//! Builds an OpenAPI (Swagger) description of CosmWasm contracts from their
//! JSON schemas, and decides what the documentation server hands out.

pub mod text;
pub mod json;
pub mod idl_processor;
pub mod api_doc;
pub mod error;
pub mod idl_loader;
pub mod wasm_codec;
pub mod executable;
pub mod commands;
pub mod processor;
pub mod cli;
