//! The schema file that `cosmwasm-schema` writes for one contract.

use vstd::prelude::*;
use crate::json::Json;

verus! {

/// A contract's schema file: its name and versions, the JSON schemas of its
/// messages, and the schemas of its query responses by query name.
#[derive(Debug)]
pub struct Idl {
    pub contract_name: String,
    pub contract_version: String,
    pub idl_version: String,
    pub instantiate: Option<Json>,
    pub execute: Option<Json>,
    pub query: Option<Json>,
    pub migrate: Option<Json>,
    pub sudo: Option<Json>,
    pub responses: Option<Vec<(String, Json)>>,
}

} // verus!
