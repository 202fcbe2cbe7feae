//! The errors of loading contract schemas.

use vstd::prelude::*;

verus! {

/// Why the schemas could not be loaded. The payloads hold the message of the
/// underlying error.
#[derive(Debug, Clone, PartialEq)]
pub enum IdlError {
    SchemaDirNotFound,
    JsonDeserializeError(String),
    IoError(String),
    PathError(String),
}

} // verus!
