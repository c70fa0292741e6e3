//! Locating the project root: the nearest directory, from the entry upwards,
//! that holds a package manifest.
use vstd::prelude::*;

verus! {

/// The parent of a path as `std::path::Path::parent` computes it, or `None`
/// for a root or an empty path.
pub uninterp spec fn parent_dir(path: Seq<char>) -> Option<Seq<char>>;

/// Relies on `std::path::Path::parent`: the result depends on the path's text
/// alone.
#[verifier::external_body]
fn path_parent(path: &str) -> (r: Option<String>)
    ensures
        r matches Some(p) ==> parent_dir(path@) == Some(p@),
        r is None ==> parent_dir(path@) is None,
{
    std::path::Path::new(path).parent().map(|p| p.to_string_lossy().into_owned())
}

/// One step of the search for a project root.
pub enum RootSearch {
    /// The directory checked holds the manifest: it is the root.
    Found(String),
    /// It does not: check this directory, its parent, next.
    Next(String),
    /// It does not, and it has no parent: there is no root.
    NotFound,
}

/// Decides the search for a project root at `dir`, given whether `dir` holds
/// the package manifest (`package.json`).
pub fn find_project_root(dir: &str, has_manifest: bool) -> (r: RootSearch)
    ensures
        has_manifest ==> (r matches RootSearch::Found(d) && d@ == dir@),
        !has_manifest ==> match parent_dir(dir@) {
            Some(p) => (r matches RootSearch::Next(d) && d@ == p),
            None => r is NotFound,
        },
{
    if has_manifest {
        RootSearch::Found(dir.to_owned())
    } else {
        match path_parent(dir) {
            Some(p) => RootSearch::Next(p),
            None => RootSearch::NotFound,
        }
    }
}

} // verus!
