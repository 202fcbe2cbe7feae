//! The commands of the command line.

pub mod build_cmd;
pub mod serve;
