//! One contract's schema as loaded from disk.

use vstd::prelude::*;
use crate::json::Json;

verus! {

/// The parsed schema file of a contract, with the compiled wasm binary found
/// next to it, if any.
#[derive(Debug)]
pub struct LoadedIdl {
    pub idl: Json,
    pub wasm: Option<Vec<u8>>,
}

} // verus!
