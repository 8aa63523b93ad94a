//! File system paths as the library carries them.
use vstd::prelude::*;
use std::path::{Path, PathBuf};

verus! {

#[verifier::external_type_specification]
#[verifier::external_body]
pub struct ExPathBuf(PathBuf);

#[verifier::external_type_specification]
#[verifier::external_body]
pub struct ExPath(Path);

/// `Path::parent`: the path without its last component, `None` for a root,
/// a prefix or the empty path. How a path splits into components depends on
/// the platform, so the contract states nothing of the result.
#[verifier::external_body]
pub(crate) fn path_parent(path: &Path) -> (parent: Option<&Path>) {
    path.parent()
}

/// `PathBuf::as_path`: the borrowed path of an owned one.
#[verifier::external_body]
pub(crate) fn borrow_path(path: &PathBuf) -> (borrowed: &Path) {
    path.as_path()
}

/// `PathBuf::from(String)`: takes the string's buffer as the path, with no
/// copy and no check. A path is opaque here, so nothing is stated of it.
#[verifier::external_body]
pub(crate) fn path_from_string(text: String) -> (path: PathBuf) {
    PathBuf::from(text)
}

} // verus!
