use swaggy::commands::serve::{RouterData, ServeCmd, SwaggerAsset, embedded_wasm};
use swaggy::idl_loader::file_names::{artifact_path, is_json_file, join_path, sibling_path};
use swaggy::idl_loader::search::{next_schema_search, start_schema_search, SearchStep};
use swaggy::json::Json;
use swaggy::text::{prefix_before, str_equal, str_less, suffix_after};
use swaggy::idl_loader::loaded_idl::LoadedIdl;
use swaggy::idl_processor::process_idl;

fn spec_with_wasm(text: &str) -> Json {
    Json::Object(vec![("x-wasm".to_string(), Json::Str(text.to_string()))])
}

/// The `x-wasm` text a build embeds for a workspace whose one contract has
/// this binary.
fn built_x_wasm(bytes: Vec<u8>) -> String {
    let idl = Json::Object(vec![
        ("contract_name".to_string(), Json::Str("c".to_string())),
        ("execute".to_string(), Json::Object(vec![("title".to_string(), Json::Str("ExecuteMsg".to_string()))])),
        ("query".to_string(), Json::Object(vec![("title".to_string(), Json::Str("QueryMsg".to_string()))])),
        ("instantiate".to_string(), Json::Object(vec![("title".to_string(), Json::Str("InstantiateMsg".to_string()))])),
    ]);
    process_idl(&vec![LoadedIdl { idl, wasm: Some(bytes) }]).unwrap().x_wasm.unwrap()
}

#[test]
fn z85_text_of_wasm() {
    assert_eq!(built_x_wasm(vec![0x86, 0x4F, 0xD2, 0x6F, 0xB5, 0x59, 0xF7, 0x5B]), "HelloWorld");
    assert_eq!(embedded_wasm(&spec_with_wasm("HelloWorld")), Some(vec![0x86, 0x4F, 0xD2, 0x6F, 0xB5, 0x59, 0xF7, 0x5B]));
    assert_eq!(embedded_wasm(&spec_with_wasm("abc")), None);
}

#[test]
fn serve_recovers_embedded_wasm() {
    for bytes in [vec![0x86, 0x4F, 0xD2, 0x6F, 7, 8], vec![1, 2, 3], vec![], vec![255; 9]] {
        let spec = spec_with_wasm(&built_x_wasm(bytes.clone()));
        assert_eq!(embedded_wasm(&spec), Some(bytes));
    }
    assert_eq!(embedded_wasm(&Json::Object(vec![])), None);
    assert_eq!(embedded_wasm(&spec_with_wasm("#")), None);
}

#[test]
fn attached_wasm_file_wins() {
    let with_file = ServeCmd { schema: "s.json".to_string(), port: 3000, wasm: Some("a.wasm".to_string()) };
    let spec = spec_with_wasm("Hello");
    assert_eq!(with_file.router_data(Some(vec![1, 2]), &spec).wasm_bytes, Some(vec![1, 2]));
    assert_eq!(with_file.router_data(None, &spec).wasm_bytes, None);
    let without = ServeCmd { schema: "s.json".to_string(), port: 3000, wasm: None };
    assert_eq!(without.router_data(None, &spec).wasm_bytes, Some(vec![0x86, 0x4F, 0xD2, 0x6F]));
}

#[test]
fn wasm_route_answers() {
    let r = RouterData { wasm_bytes: Some(vec![0, 97, 115, 109]) }.wasm_response();
    assert_eq!(r.status, 200);
    assert_eq!(r.body, vec![0, 97, 115, 109]);
    let r = RouterData { wasm_bytes: None }.wasm_response();
    assert_eq!(r.status, 404);
    assert_eq!(r.body, b"Wasm bytecode not provided.".to_vec());
}

#[test]
fn swagger_assets() {
    assert_eq!(SwaggerAsset::Css.file_name(), "swagger-ui.css");
    assert_eq!(SwaggerAsset::Css.content_type(), "text/css");
    assert_eq!(SwaggerAsset::Bundle.file_name(), "swagger-ui-bundle.js");
    assert_eq!(SwaggerAsset::EsBundle.file_name(), "swagger-ui-es-bundle.js");
    assert_eq!(SwaggerAsset::Js.file_name(), "swagger-ui.js");
    assert_eq!(SwaggerAsset::StandalonePreset.file_name(), "swagger-ui-standalone-preset.js");
    assert_eq!(SwaggerAsset::StandalonePreset.content_type(), "text/javascript");
}

#[test]
fn json_schema_files() {
    assert!(is_json_file("counter.json"));
    assert!(is_json_file("a.b.json"));
    assert!(!is_json_file(".json"));
    assert!(!is_json_file("json"));
    assert!(!is_json_file("counter.json.bak"));
    assert!(!is_json_file("counter.JSON"));
    assert!(!is_json_file(".."));
}

#[test]
fn wasm_artifact_names() {
    assert_eq!(artifact_path("counter.json"), "artifacts/counter.wasm");
    assert_eq!(artifact_path("cw20.v1.json"), "artifacts/cw20.wasm");
    assert_eq!(artifact_path(".hidden.json"), "artifacts/.hidden.wasm");
    assert_eq!(artifact_path("a..json"), "artifacts/a.wasm");
    assert_eq!(artifact_path("..json"), "artifacts.wasm");
    assert_eq!(artifact_path("...json"), "artifacts/..");
}

#[test]
fn joining_paths() {
    assert_eq!(join_path("dir", "swagger.json"), "dir/swagger.json");
    assert_eq!(join_path("dir/", "swagger.json"), "dir/swagger.json");
    assert_eq!(join_path("", "swagger.json"), "swagger.json");
}

#[test]
fn sibling_paths() {
    assert_eq!(sibling_path("a/b/counter.json", "swagger.json"), "a/b/swagger.json");
    assert_eq!(sibling_path("/counter.json", "swagger.json"), "/swagger.json");
    assert_eq!(sibling_path("counter.json", "swagger.json"), "swagger.json");
}

#[test]
fn schema_search_walks_up() {
    assert_eq!(
        start_schema_search("ws/contracts/counter"),
        SearchStep::Probe { dir: "ws/contracts/counter".to_string(), schema_dir: "ws/contracts/counter/schema".to_string() }
    );
    assert_eq!(
        next_schema_search("ws/contracts/counter", false),
        SearchStep::Probe { dir: "ws/contracts".to_string(), schema_dir: "ws/contracts/schema".to_string() }
    );
    assert_eq!(
        next_schema_search("ws/contracts", true),
        SearchStep::Load { schema_dir: "ws/contracts/schema".to_string() }
    );
    assert_eq!(
        next_schema_search("ws", false),
        SearchStep::Probe { dir: "".to_string(), schema_dir: "schema".to_string() }
    );
    assert_eq!(next_schema_search("", false), SearchStep::NotFound);
    assert_eq!(next_schema_search("/", false), SearchStep::NotFound);
}

#[test]
fn built_wasm_survives_the_json_file() {
    let bytes = vec![0x00, 0x61, 0x73, 0x6d, 0x01, 0x00, 0x00];
    let text = built_x_wasm(bytes.clone());
    let mut doc = serde_json::Map::new();
    doc.insert("x-wasm".to_string(), serde_json::Value::String(text));
    let written = serde_json::to_string_pretty(&serde_json::Value::Object(doc)).unwrap();
    let read: serde_json::Value = serde_json::from_str(&written).unwrap();
    let x = read.get("x-wasm").unwrap().as_str().unwrap();
    assert_eq!(embedded_wasm(&spec_with_wasm(x)), Some(bytes));
}

#[test]
fn text_helpers() {
    assert!(str_equal("abc", "abc"));
    assert!(!str_equal("abc", "abd"));
    assert!(str_less("Zed", "abc"));
    assert!(str_less("ab", "abc"));
    assert!(!str_less("abc", "abc"));
    assert!(str_less("é", "ê"));
    assert_eq!(prefix_before("line one\nline two", '\n'), "line one");
    assert_eq!(prefix_before("single", '\n'), "single");
    assert_eq!(suffix_after("#/definitions/Uint128", '/'), "Uint128");
    assert_eq!(suffix_after("Addr", '/'), "Addr");
    assert_eq!(suffix_after("a/", '/'), "");
}
