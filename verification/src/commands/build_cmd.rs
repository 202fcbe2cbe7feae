//! The `build` command: writes `swagger.json` for the contracts of a
//! workspace.

use vstd::prelude::*;

verus! {

/// Arguments of `build`: the cosmwasm-schema file to use. The search for the
/// `schema` directory starts from it, and `swagger.json` is written next to
/// it (into it, when a directory is given).
#[derive(Debug, Clone, PartialEq)]
pub struct BuildCmd {
    pub schema: String,
}

} // verus!
