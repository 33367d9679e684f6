//! File-system paths as text, read the way `std::path` reads them on the platform that the
//! library is built for.

use vstd::prelude::*;

verus! {

/// The path that `std::path::Path::join` gives for `base` and `name`.
pub uninterp spec fn joined(base: Seq<char>, name: Seq<char>) -> Seq<char>;

/// Whether `std::path::Path::starts_with` holds of `path` and `base`: `base` is `path` itself
/// or one of the directories above it, compared component by component.
pub uninterp spec fn is_under(path: Seq<char>, base: Seq<char>) -> bool;

/// Whether `std::path::Path::ends_with` holds of `path` and `child`: the last components of
/// `path` are those of `child`.
pub uninterp spec fn is_named(path: Seq<char>, child: Seq<char>) -> bool;

/// What `std::path::Path::extension` gives for `path`.
pub uninterp spec fn extension_of(path: Seq<char>) -> Option<Seq<char>>;

/// What `std::path::Path::parent` gives for `path`.
pub uninterp spec fn parent_of(path: Seq<char>) -> Option<Seq<char>>;

/// Calls `std::path::Path::join`: `name` appended to `base` as further components, or `name`
/// alone where it is absolute. The contract only names the result.
#[verifier::external_body]
pub(crate) fn join(base: &str, name: &str) -> (path: String)
    ensures
        path@ == joined(base@, name@),
{
    std::path::Path::new(base).join(name).to_string_lossy().into_owned()
}

/// Calls `std::path::Path::starts_with`. The contract only names the result.
#[verifier::external_body]
pub(crate) fn starts_with(path: &str, base: &str) -> (under: bool)
    ensures
        under == is_under(path@, base@),
{
    std::path::Path::new(path).starts_with(base)
}

/// Calls `std::path::Path::ends_with`. The contract only names the result.
#[verifier::external_body]
pub(crate) fn ends_with(path: &str, child: &str) -> (named: bool)
    ensures
        named == is_named(path@, child@),
{
    std::path::Path::new(path).ends_with(child)
}

/// Calls `std::path::Path::extension`: the part of the file name after its last dot, if the
/// name has one that is not its first character. The contract only names the result.
#[verifier::external_body]
pub(crate) fn extension(path: &str) -> (found: Option<String>)
    ensures
        match found {
            Some(text) => extension_of(path@) == Some(text@),
            None => extension_of(path@).is_none(),
        },
{
    std::path::Path::new(path).extension().map(|e| e.to_string_lossy().into_owned())
}

/// Calls `std::path::Path::parent`: the path without its last component, or nothing where
/// the path ends in a root or is empty. The contract names the result and adds that the
/// parent, being the path cut short, is shorter than the path.
#[verifier::external_body]
pub(crate) fn parent(path: &str) -> (found: Option<String>)
    ensures
        match found {
            Some(text) => parent_of(path@) == Some(text@) && text@.len() < path@.len(),
            None => parent_of(path@).is_none(),
        },
{
    std::path::Path::new(path).parent().map(|p| p.to_string_lossy().into_owned())
}

} // verus!
