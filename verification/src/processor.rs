//! The document skeleton for a single contract.

use vstd::prelude::*;
use crate::api_doc::{ApiDoc, ApiDocView, new_path_map, paths_view, path_entries, PathEntryView};
use crate::error::CliError;
use crate::idl_loader::idl::Idl;

verus! {

/// The document of one contract before any path is added: titled with the
/// contract's name, versioned with its version, with an empty components
/// section and the remaining fields at their defaults.
pub fn process_idl(idl: &Idl) -> (r: Result<ApiDoc, CliError>)
    ensures
        r matches Ok(d) && d@ == (ApiDocView {
            openapi: Seq::empty(),
            title: idl.contract_name@,
            description: Some("CosmWasm Smart Contract Documentation"@),
            version: idl.contract_version@,
            x_wasm: None,
            paths: Seq::empty(),
            components: true,
        }),
{
    let openapi = ApiDoc {
        openapi: String::new(),
        title: idl.contract_name.clone(),
        description: Some("CosmWasm Smart Contract Documentation".to_owned()),
        version: idl.contract_version.clone(),
        x_wasm: None,
        paths: new_path_map(),
        components: true,
    };
    assert(paths_view(path_entries(openapi.paths)) =~= Seq::<(Seq<char>, PathEntryView)>::empty());
    Ok(openapi)
}

} // verus!
