//! Loading contract schemas.

pub mod error;
pub mod loaded_idl;
pub mod file_names;
pub mod idl;
pub mod search;
