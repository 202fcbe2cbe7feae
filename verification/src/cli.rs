//! The command line and the steps a command goes through.

use vstd::prelude::*;
use crate::api_doc::ApiDoc;
use crate::commands::build_cmd::BuildCmd;
use crate::error::CliError;
use crate::executable::ExecutionContext;
use crate::idl_loader::error::IdlError;
use crate::idl_loader::file_names::{containing_dir, join_path, joined_path, sibling_path};
use crate::idl_loader::loaded_idl::LoadedIdl;
use crate::idl_processor::process_idl;
use crate::idl_processor::spec::{idls_processable, spec_api_doc};

verus! {

/// A parsed command line.
#[derive(Debug, Clone, PartialEq)]
pub struct Cli {
    pub command: Command,
}

/// The commands.
#[derive(Debug, Clone, PartialEq)]
pub enum Command {
    /// Build a swagger.json file from the contract schema
    Build(BuildCmd),
}

/// What the surroundings report back to a running command.
#[derive(Debug)]
pub enum CliEvent {
    /// The command line was parsed and the context set up.
    Started,
    /// The contract schemas were loaded; `schema_is_file` tells whether the
    /// path the command was given names a file.
    IdlsLoaded { idls: Vec<LoadedIdl>, schema_is_file: bool },
    /// Loading the schemas failed.
    LoadFailed(IdlError),
    /// The document was written.
    DocumentWritten,
    /// Serialising or writing the document failed.
    WriteFailed(CliError),
}

/// What a running command asks its surroundings to do next.
#[derive(Debug)]
pub enum CliAction {
    /// Find the `schema` directory, starting at `search_dir` and going up,
    /// and load the contract schemas in it.
    LoadIdls { search_dir: String },
    /// Write the document as pretty JSON to `path`.
    WriteDocument { path: String, doc: ApiDoc },
    /// Stop with this outcome.
    Finish(Result<(), CliError>),
}

/// The file a build writes its document to: `swagger.json` next to the
/// schema file it was given, or inside the directory it was given.
pub open spec fn output_path(cmd: BuildCmd, schema_is_file: bool) -> Seq<char> {
    if schema_is_file {
        containing_dir(cmd.schema@) + "swagger.json"@
    } else {
        joined_path(cmd.schema@, "swagger.json"@)
    }
}

/// Built from a directory, the document goes inside that directory: its path
/// is the directory as given, a `/` unless the directory is empty or already
/// ends with one, then `swagger.json`; so the given path is always a proper
/// prefix of it.
pub proof fn law_directory_output_inside(cmd: BuildCmd)
    ensures
        output_path(cmd, false) == cmd.schema@ + (if cmd.schema@.len() == 0
            || cmd.schema@.last() == '/' {
            Seq::<char>::empty()
        } else {
            seq!['/']
        }) + "swagger.json"@,
        output_path(cmd, false).len() > cmd.schema@.len(),
        output_path(cmd, false).take(cmd.schema@.len() as int) == cmd.schema@,
{
    reveal_strlit("swagger.json");
    let p = output_path(cmd, false);
    assert(p.take(cmd.schema@.len() as int) =~= cmd.schema@);
}

impl Cli {
    /// The next step of the command, given what happened last. A build loads
    /// the schemas found from the given path, makes the document of them,
    /// writes it to `swagger.json` next to the given schema file (inside the
    /// given directory), and ends with the first error it meets.
    pub fn run_cli(&self, ctx: &ExecutionContext, event: CliEvent) -> (r: CliAction)
        requires
            event matches CliEvent::IdlsLoaded { idls, schema_is_file } ==> idls_processable(idls@),
        ensures
            match self.command {
                Command::Build(cmd) => match event {
                    CliEvent::Started => r matches CliAction::LoadIdls { search_dir } && search_dir@ == cmd.schema@,
                    CliEvent::IdlsLoaded { idls, schema_is_file } => r matches CliAction::WriteDocument {
                        path,
                        doc,
                    } && path@ == output_path(cmd, schema_is_file) && doc@ == spec_api_doc(idls@),
                    CliEvent::LoadFailed(e) => r == CliAction::Finish(Err(CliError::IdlError(e))),
                    CliEvent::DocumentWritten => r == CliAction::Finish(Ok(())),
                    CliEvent::WriteFailed(e) => r == CliAction::Finish(Err(e)),
                },
            },
    {
        match &self.command {
            Command::Build(cmd) => match event {
                CliEvent::Started => CliAction::LoadIdls { search_dir: cmd.schema.clone() },
                CliEvent::IdlsLoaded { idls, schema_is_file } => {
                    match process_idl(&idls) {
                        Ok(doc) => CliAction::WriteDocument {
                            path: if schema_is_file {
                                sibling_path(cmd.schema.as_str(), "swagger.json")
                            } else {
                                join_path(cmd.schema.as_str(), "swagger.json")
                            },
                            doc,
                        },
                        Err(e) => CliAction::Finish(Err(e)),
                    }
                },
                CliEvent::LoadFailed(e) => CliAction::Finish(Err(CliError::IdlError(e))),
                CliEvent::DocumentWritten => CliAction::Finish(Ok(())),
                CliEvent::WriteFailed(e) => CliAction::Finish(Err(e)),
            },
        }
    }
}

} // verus!
