//! Directory listing and walking, through the `walkdir` crate.
//!
//! The walkers are trusted wrappers that hand the tree back as plain values;
//! what the results depend on is the disk, so their contracts state nothing
//! and every decision over them is made — and verified — in the callers.

use vstd::prelude::*;

verus! {

/// One directory entry as the walk found it.
pub struct FsEntry {
    /// The entry's own name, without its directories.
    pub name: String,
    /// The entry's full pathname.
    pub pathname: String,
    pub is_file: bool,
    pub is_dir: bool,
}

/// One step of a recursive walk: an entry, or a subtree the walk could not
/// read.
pub enum WalkItem {
    Found(FsEntry),
    Failed(String),
}

/// Relies on std::path::Path::is_dir: whether the path names an existing
/// directory. Reads the disk, so nothing is stated of the result.
#[verifier::external_body]
pub(crate) fn path_is_dir(path: &str) -> bool {
    std::path::Path::new(path).is_dir()
}

/// Relies on walkdir::WalkDir with a depth bound of one: the immediate
/// children of `root`, or the error that stopped the listing. Reads the
/// disk, so nothing is stated of the result.
#[verifier::external_body]
pub(crate) fn list_dir(root: &str) -> (r: Result<Vec<FsEntry>, String>) {
    let mut v = Vec::new();
    for item in walkdir::WalkDir::new(root).min_depth(1).max_depth(1) {
        match item {
            Ok(e) => v.push(FsEntry {
                name: e.file_name().to_string_lossy().into_owned(),
                pathname: e.path().to_string_lossy().into_owned(),
                is_file: e.file_type().is_file(),
                is_dir: e.file_type().is_dir(),
            }),
            Err(err) => return Err(err.to_string()),
        }
    }
    Ok(v)
}

/// Relies on walkdir::WalkDir: every descendant of `root`, depth first, with
/// unreadable subtrees reported in place. Reads the disk, so nothing is
/// stated of the result.
#[verifier::external_body]
pub(crate) fn walk_tree(root: &str) -> (r: Vec<WalkItem>) {
    let mut v = Vec::new();
    for item in walkdir::WalkDir::new(root) {
        match item {
            Ok(e) => v.push(WalkItem::Found(FsEntry {
                name: e.file_name().to_string_lossy().into_owned(),
                pathname: e.path().to_string_lossy().into_owned(),
                is_file: e.file_type().is_file(),
                is_dir: e.file_type().is_dir(),
            })),
            Err(err) => v.push(WalkItem::Failed(err.to_string())),
        }
    }
    v
}

} // verus!
