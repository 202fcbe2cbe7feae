//! The errors a command can end with.

use vstd::prelude::*;
use crate::idl_loader::error::IdlError;

verus! {

/// Why a command failed. The payloads hold the message of the underlying
/// error.
#[derive(Debug, Clone, PartialEq)]
pub enum CliError {
    ClapError(String),
    IOError(String),
    JsonError(String),
    IdlError(IdlError),
}

} // verus!
