use swaggy::cli::{Cli, CliAction, CliEvent, Command};
use swaggy::commands::build_cmd::BuildCmd;
use swaggy::error::CliError;
use swaggy::executable::ExecutionContext;
use swaggy::idl_loader::error::IdlError;
use swaggy::idl_loader::loaded_idl::LoadedIdl;
use swaggy::json::Json;

fn s(x: &str) -> Json {
    Json::Str(x.to_string())
}

fn obj(members: Vec<(&str, Json)>) -> Json {
    Json::Object(members.into_iter().map(|(k, v)| (k.to_string(), v)).collect())
}

fn cli(schema: &str) -> Cli {
    Cli { command: Command::Build(BuildCmd { schema: schema.to_string() }) }
}

fn ctx() -> ExecutionContext {
    ExecutionContext { project_root: "/work".to_string() }
}

#[test]
fn verify_cli() {
    let c = cli("contracts/counter");
    match c.run_cli(&ctx(), CliEvent::Started) {
        CliAction::LoadIdls { search_dir } => assert_eq!(search_dir, "contracts/counter"),
        other => panic!("unexpected {:?}", other),
    }
    match c.run_cli(&ctx(), CliEvent::LoadFailed(IdlError::SchemaDirNotFound)) {
        CliAction::Finish(Err(CliError::IdlError(IdlError::SchemaDirNotFound))) => {}
        other => panic!("unexpected {:?}", other),
    }
    match c.run_cli(&ctx(), CliEvent::DocumentWritten) {
        CliAction::Finish(Ok(())) => {}
        other => panic!("unexpected {:?}", other),
    }
    match c.run_cli(&ctx(), CliEvent::WriteFailed(CliError::IOError("disk full".to_string()))) {
        CliAction::Finish(Err(CliError::IOError(m))) => assert_eq!(m, "disk full"),
        other => panic!("unexpected {:?}", other),
    }
}

#[test]
fn build_writes_document_next_to_schema() {
    let idl = obj(vec![
        ("contract_name", s("counter")),
        ("execute", obj(vec![("title", s("ExecuteMsg")), ("oneOf", Json::Array(vec![
            obj(vec![("type", s("string")), ("enum", Json::Array(vec![s("increment")]))]),
        ]))])),
        ("query", obj(vec![("title", s("QueryMsg")), ("oneOf", Json::Array(vec![]))])),
        ("instantiate", obj(vec![("title", s("InstantiateMsg")), ("type", s("object"))])),
    ]);
    let c = cli("contracts/counter/");
    let loaded = CliEvent::IdlsLoaded { idls: vec![LoadedIdl { idl, wasm: None }], schema_is_file: false };
    match c.run_cli(&ctx(), loaded) {
        CliAction::WriteDocument { path, doc } => {
            assert_eq!(path, "contracts/counter/swagger.json");
            assert_eq!(doc.paths.len(), 1);
            assert!(doc.paths.contains_key("/counter/increment"));
        }
        other => panic!("unexpected {:?}", other),
    }
}

#[test]
fn build_from_schema_file_writes_next_to_it() {
    let c = cli("contracts/counter/schema/counter.json");
    match c.run_cli(&ctx(), CliEvent::IdlsLoaded { idls: vec![], schema_is_file: true }) {
        CliAction::WriteDocument { path, doc } => {
            assert_eq!(path, "contracts/counter/schema/swagger.json");
            assert!(doc.paths.is_empty());
        }
        other => panic!("unexpected {:?}", other),
    }
    let c = cli("counter.json");
    match c.run_cli(&ctx(), CliEvent::IdlsLoaded { idls: vec![], schema_is_file: true }) {
        CliAction::WriteDocument { path, .. } => assert_eq!(path, "swagger.json"),
        other => panic!("unexpected {:?}", other),
    }
}
