//! File-system paths carried through the library as configuration.
use vstd::prelude::*;

verus! {

/// `std::path::PathBuf`, carried as an opaque value.
#[verifier::external_type_specification]
#[verifier::external_body]
pub struct ExPathBuf(std::path::PathBuf);

/// `Clone` of `PathBuf`: the documentation of `Clone::clone` promises a
/// copy of the value, so the clone is the same path.
pub assume_specification[ <std::path::PathBuf as Clone>::clone ](p: &std::path::PathBuf) -> (r:
    std::path::PathBuf)
    ensures
        r == *p,
;

/// The name of the path that `PathBuf::from` makes of a text; it depends on
/// the text alone.
pub uninterp spec fn path_from(text: Seq<char>) -> std::path::PathBuf;

/// The name of the path that `Path::join` makes of a base path and a part;
/// it depends on them alone.
pub uninterp spec fn path_join(base: std::path::PathBuf, part: Seq<char>) -> std::path::PathBuf;

/// `PathBuf::from` of std on a text.  The contract names the result.
#[verifier::external_body]
pub(crate) fn path_of(text: &str) -> (r: std::path::PathBuf)
    ensures
        r == path_from(text@),
{
    std::path::PathBuf::from(text)
}

/// The current user's home directory (`dirs::home_dir`).  It depends on the
/// environment and the platform, so nothing is promised of it.
#[verifier::external_body]
pub(crate) fn home_dir() -> Option<std::path::PathBuf> {
    dirs::home_dir()
}

/// `Path::join` of std: `base` extended by one relative component.  The
/// contract names the result.
#[verifier::external_body]
pub(crate) fn join_path(base: &std::path::PathBuf, part: &str) -> (r: std::path::PathBuf)
    ensures
        r == path_join(*base, part@),
{
    base.join(part)
}

} // verus!
