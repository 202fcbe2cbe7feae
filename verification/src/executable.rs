//! Where a command runs.

use vstd::prelude::*;

verus! {

/// The context of a command: the directory it was started in.
#[derive(Debug, Clone, PartialEq)]
pub struct ExecutionContext {
    pub project_root: String,
}

} // verus!
