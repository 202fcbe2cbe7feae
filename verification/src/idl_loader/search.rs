//! The search for the `schema` directory: the given directory, then its
//! parents in turn, up to the first that holds one.

use vstd::prelude::*;
use crate::idl_loader::file_names::{join_path, joined_path};

verus! {

/// The path `PathBuf::pop` leaves of a path, `None` where it has no parent
/// (and `pop` returns `false`).
pub uninterp spec fn path_parent(p: Seq<char>) -> Option<Seq<char>>;

/// `PathBuf::pop`: the result is the path it leaves, `None` when it reports
/// that there was no parent.
#[verifier::external_body]
fn parent_of(p: &str) -> (r: Option<String>)
    ensures
        r is Some <==> path_parent(p@) is Some,
        r matches Some(s) ==> path_parent(p@) == Some(s@),
{
    let mut path = std::path::PathBuf::from(p);
    if path.pop() {
        Some(path.to_string_lossy().into_owned())
    } else {
        None
    }
}

/// The next step of the search.
#[derive(Debug, Clone, PartialEq)]
pub enum SearchStep {
    /// Look whether `schema_dir` exists; `dir` is where the search stands.
    Probe { dir: String, schema_dir: String },
    /// The schemas are in `schema_dir`.
    Load { schema_dir: String },
    /// No directory on the way up holds a `schema` directory.
    NotFound,
}

/// The directory probed from `dir`.
pub open spec fn schema_dir_of(dir: Seq<char>) -> Seq<char> {
    joined_path(dir, "schema"@)
}

/// The first step: probe the `schema` directory of the starting directory.
pub fn start_schema_search(dir: &str) -> (r: SearchStep)
    ensures
        r matches SearchStep::Probe { dir: d, schema_dir } && d@ == dir@ && schema_dir@ == schema_dir_of(
            dir@,
        ),
{
    SearchStep::Probe { dir: dir.to_owned(), schema_dir: join_path(dir, "schema") }
}

/// The step after probing the `schema` directory of `dir`: load it if it
/// exists, else probe the parent of `dir`, else give up.
pub fn next_schema_search(dir: &str, schema_exists: bool) -> (r: SearchStep)
    ensures
        schema_exists ==> (r matches SearchStep::Load { schema_dir } && schema_dir@ == schema_dir_of(dir@)),
        !schema_exists ==> match path_parent(dir@) {
            Some(parent) => (r matches SearchStep::Probe { dir: d, schema_dir } && d@ == parent
                && schema_dir@ == schema_dir_of(parent)),
            None => r == SearchStep::NotFound,
        },
{
    if schema_exists {
        SearchStep::Load { schema_dir: join_path(dir, "schema") }
    } else {
        match parent_of(dir) {
            Some(parent) => {
                let schema_dir = join_path(parent.as_str(), "schema");
                SearchStep::Probe { dir: parent, schema_dir }
            },
            None => SearchStep::NotFound,
        }
    }
}

} // verus!
