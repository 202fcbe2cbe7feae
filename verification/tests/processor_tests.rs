use swaggy::api_doc::{HttpMethod, SchemaType};
use swaggy::idl_loader::loaded_idl::LoadedIdl;
use swaggy::idl_processor::variant_info::{VariantInfo, VariantParameter, insert_parameter};
use swaggy::idl_processor::{
    extract_variant, extract_variants, generate_path_item, idl_is_processable, process_idl,
    resolve_parameter_data, resolve_type,
};
use swaggy::json::Json;

fn s(x: &str) -> Json {
    Json::Str(x.to_string())
}

fn arr(items: Vec<Json>) -> Json {
    Json::Array(items)
}

fn obj(members: Vec<(&str, Json)>) -> Json {
    Json::Object(members.into_iter().map(|(k, v)| (k.to_string(), v)).collect())
}

fn param<'a>(v: &'a VariantInfo, name: &str) -> Option<&'a VariantParameter> {
    v.parameters.iter().find(|(k, _)| k == name).map(|(_, p)| p)
}

/// An execute message in the shape `cosmwasm-schema` writes.
fn execute_msg() -> Json {
    obj(vec![
        ("title", s("ExecuteMsg")),
        ("oneOf", arr(vec![
            obj(vec![
                ("description", s("Adds one.\nThe counter saturates.")),
                ("type", s("string")),
                ("enum", arr(vec![s("increment")])),
            ]),
            obj(vec![
                ("description", s("Sets the counter.")),
                ("type", s("object")),
                ("required", arr(vec![s("reset")])),
                ("properties", obj(vec![(
                    "reset",
                    obj(vec![
                        ("type", s("object")),
                        ("required", arr(vec![s("count")])),
                        ("properties", obj(vec![
                            ("count", obj(vec![("type", s("integer")), ("format", s("int32"))])),
                            ("owner", obj(vec![("anyOf", arr(vec![
                                obj(vec![("$ref", s("#/definitions/Addr"))]),
                                obj(vec![("type", s("null"))]),
                            ]))])),
                            ("amount", obj(vec![("$ref", s("#/definitions/Uint128"))])),
                            ("memo", obj(vec![("type", arr(vec![s("string"), s("null")]))])),
                        ])),
                    ]),
                )])),
            ]),
        ])),
    ])
}

fn query_msg() -> Json {
    obj(vec![
        ("title", s("QueryMsg")),
        ("oneOf", arr(vec![obj(vec![
            ("type", s("object")),
            ("required", arr(vec![s("get_count")])),
            ("properties", obj(vec![(
                "get_count",
                obj(vec![("type", s("object")), ("properties", obj(vec![]))]),
            )])),
        ])])),
    ])
}

fn instantiate_msg() -> Json {
    obj(vec![
        ("title", s("InstantiateMsg")),
        ("description", s("Creates the counter.")),
        ("type", s("object")),
        ("required", arr(vec![s("count")])),
        ("properties", obj(vec![("count", obj(vec![("type", s("u64"))]))])),
    ])
}

fn counter_idl(name: &str, wasm: Option<Vec<u8>>) -> LoadedIdl {
    LoadedIdl {
        idl: obj(vec![
            ("contract_name", s(name)),
            ("contract_version", s("0.1.0")),
            ("instantiate", instantiate_msg()),
            ("execute", execute_msg()),
            ("query", query_msg()),
        ]),
        wasm,
    }
}

#[test]
fn extracts_enum_and_struct_variants() {
    let vs = extract_variants("counter", &execute_msg()).unwrap();
    assert_eq!(vs.len(), 2);
    assert_eq!(vs[0].name, "increment");
    assert_eq!(vs[0].description, "Adds one.\nThe counter saturates.");
    assert!(vs[0].parameters.is_empty());
    assert!(!vs[0].read_call);
    assert_eq!(vs[0].contract_tag, "counter");
    assert_eq!(vs[1].name, "reset");
    let names: Vec<&str> = vs[1].parameters.iter().map(|(k, _)| k.as_str()).collect();
    assert_eq!(names, vec!["amount", "count", "memo", "owner"]);
    assert_eq!(param(&vs[1], "count").unwrap(), &VariantParameter { t: "integer".to_string(), required: true });
    assert_eq!(param(&vs[1], "owner").unwrap(), &VariantParameter { t: "Addr".to_string(), required: false });
    assert_eq!(param(&vs[1], "amount").unwrap(), &VariantParameter { t: "Uint128".to_string(), required: false });
    assert_eq!(param(&vs[1], "memo").unwrap(), &VariantParameter { t: "string".to_string(), required: false });
}

#[test]
fn query_messages_are_read_calls() {
    let vs = extract_variants("counter", &query_msg()).unwrap();
    assert_eq!(vs.len(), 1);
    assert_eq!(vs[0].name, "get_count");
    assert!(vs[0].read_call);
    assert!(vs[0].parameters.is_empty());
}

#[test]
fn single_variant_message_is_named_by_its_title() {
    let vs = extract_variants("counter", &instantiate_msg()).unwrap();
    assert_eq!(vs.len(), 1);
    assert_eq!(vs[0].name, "InstantiateMsg");
    assert_eq!(vs[0].description, "Creates the counter.");
    // The first property's own `required` is read, which this schema lacks.
    assert_eq!(param(&vs[0], "count").unwrap(), &VariantParameter { t: "u64".to_string(), required: false });
}

#[test]
fn variant_without_inner_properties_has_no_parameters() {
    let mut vs = Vec::new();
    let v = obj(vec![("properties", obj(vec![("ping", obj(vec![("type", s("object"))]))]))]);
    extract_variant(&mut vs, &v, false, false, "c");
    assert_eq!(vs.len(), 1);
    assert_eq!(vs[0].name, "ping");
    assert_eq!(vs[0].description, "");
    assert!(vs[0].parameters.is_empty());
}

#[test]
fn schema_without_enum_or_properties_yields_nothing() {
    let mut vs = Vec::new();
    extract_variant(&mut vs, &obj(vec![("type", s("null"))]), true, true, "c");
    assert!(vs.is_empty());
}

#[test]
fn resolves_integer_types() {
    assert_eq!(resolve_type("u64"), SchemaType::Number { unsigned: true });
    assert_eq!(resolve_type("u8"), SchemaType::Number { unsigned: true });
    assert_eq!(resolve_type("i32"), SchemaType::Number { unsigned: false });
    assert_eq!(resolve_type("i16"), SchemaType::Number { unsigned: false });
    assert_eq!(resolve_type("u128"), SchemaType::Text);
    assert_eq!(resolve_type("integer"), SchemaType::Text);
    assert_eq!(resolve_type("u"), SchemaType::Text);
    assert_eq!(resolve_type("Uint128"), SchemaType::Text);
}

#[test]
fn parameter_data_carries_name_and_requirement() {
    let q = resolve_parameter_data("count", &VariantParameter { t: "u32".to_string(), required: true });
    assert_eq!(q.name, "count");
    assert!(q.required);
    assert_eq!(q.schema, SchemaType::Number { unsigned: true });
}

#[test]
fn parameters_stay_sorted_and_unique() {
    let mut ps = Vec::new();
    for (k, t) in [("zeta", "a"), ("alpha", "b"), ("mid", "c"), ("alpha", "d"), ("Beta", "e")] {
        insert_parameter(&mut ps, k.to_string(), VariantParameter { t: t.to_string(), required: false });
    }
    let names: Vec<&str> = ps.iter().map(|(k, _)| k.as_str()).collect();
    assert_eq!(names, vec!["Beta", "alpha", "mid", "zeta"]);
    assert_eq!(ps[1].1.t, "d");
}

#[test]
fn path_item_of_a_variant() {
    let mut doc = swaggy::processor::process_idl(&swaggy::idl_loader::idl::Idl {
        contract_name: "x".to_string(),
        contract_version: "1".to_string(),
        idl_version: "1".to_string(),
        instantiate: None,
        execute: None,
        query: None,
        migrate: None,
        sudo: None,
        responses: None,
    })
    .unwrap();
    let vs = extract_variants("counter", &execute_msg()).unwrap();
    generate_path_item(&vs[0], &mut doc);
    let e = doc.paths.get("/counter/increment").unwrap();
    assert_eq!(e.method, HttpMethod::Post);
    assert_eq!(e.operation.summary, "Adds one.");
    assert_eq!(e.operation.description, "Adds one.\nThe counter saturates.");
    assert_eq!(e.operation.tags, vec!["counter".to_string()]);
    assert_eq!(e.operation.response.status, 200);
    assert_eq!(e.operation.response.description, "A successful response");
    assert_eq!(e.operation.response.content_type, "application/json");
    assert_eq!(e.operation.response.schema_title, "Response from the chain");
    assert_eq!(e.variant, vs[0]);
}

#[test]
fn document_of_a_workspace() {
    let idls = vec![counter_idl("counter", Some(vec![0x86, 0x4F, 0xD2, 0x6F]))];
    assert!(idl_is_processable(&idls));
    let doc = process_idl(&idls).unwrap();
    assert_eq!(doc.openapi, "3.0.0");
    assert_eq!(doc.title, "CosmWasm Swaggy Documentation");
    assert_eq!(doc.description.as_deref(), Some("CosmWasm workspace documentation"));
    assert_eq!(doc.version, "0.1.0");
    assert!(doc.components);
    assert_eq!(doc.x_wasm.as_deref(), Some("Hello"));
    let keys: Vec<&str> = doc.paths.keys().map(|k| k.as_str()).collect();
    assert_eq!(keys, vec!["/counter/increment", "/counter/reset", "/counter/get_count", "/counter/InstantiateMsg"]);
    assert_eq!(doc.paths["/counter/get_count"].method, HttpMethod::Get);
    assert_eq!(doc.paths["/counter/reset"].method, HttpMethod::Post);
    let reset = &doc.paths["/counter/reset"].operation;
    let names: Vec<&str> = reset.parameters.iter().map(|p| p.name.as_str()).collect();
    assert_eq!(names, vec!["amount", "count", "memo", "owner"]);
    assert!(reset.parameters[1].required);
    let inst = &doc.paths["/counter/InstantiateMsg"].operation;
    assert_eq!(inst.parameters[0].schema, SchemaType::Number { unsigned: true });
}

#[test]
fn later_contract_replaces_same_path_and_wasm() {
    let idls = vec![
        counter_idl("counter", Some(vec![0x86, 0x4F, 0xD2, 0x6F])),
        counter_idl("other", None),
        counter_idl("counter", Some(vec![0xB5, 0x59, 0xF7, 0x5B])),
    ];
    let doc = process_idl(&idls).unwrap();
    assert_eq!(doc.paths.len(), 8);
    assert_eq!(doc.x_wasm.as_deref(), Some("World"));
    let keys: Vec<&str> = doc.paths.keys().map(|k| k.as_str()).collect();
    assert_eq!(keys[0], "/counter/increment");
    assert_eq!(keys[4], "/other/increment");
}

#[test]
fn empty_workspace_gives_empty_document() {
    let doc = process_idl(&Vec::new()).unwrap();
    assert!(doc.paths.is_empty());
    assert_eq!(doc.x_wasm, None);
}

#[test]
fn malformed_schemas_are_not_processable() {
    let mut no_name = counter_idl("counter", None);
    if let Json::Object(m) = &mut no_name.idl {
        m.retain(|(k, _)| k != "contract_name");
    }
    assert!(!idl_is_processable(&vec![no_name]));

    let mut missing_query = counter_idl("counter", None);
    if let Json::Object(m) = &mut missing_query.idl {
        m.retain(|(k, _)| k != "query");
    }
    assert!(!idl_is_processable(&vec![missing_query]));

    let bad_description = LoadedIdl {
        idl: obj(vec![
            ("contract_name", s("c")),
            ("execute", obj(vec![("title", s("ExecuteMsg")), ("oneOf", arr(vec![obj(vec![
                ("description", Json::Number("1".to_string())),
                ("enum", arr(vec![s("a")])),
            ])]))])),
            ("query", query_msg()),
            ("instantiate", instantiate_msg()),
        ]),
        wasm: None,
    };
    assert!(!idl_is_processable(&vec![bad_description]));

    let untyped_parameter = LoadedIdl {
        idl: obj(vec![
            ("contract_name", s("c")),
            ("execute", obj(vec![
                ("title", s("ExecuteMsg")),
                ("properties", obj(vec![("n", obj(vec![("type", Json::Bool(true))]))])),
            ])),
            ("query", query_msg()),
            ("instantiate", instantiate_msg()),
        ]),
        wasm: None,
    };
    assert!(!idl_is_processable(&vec![untyped_parameter]));

    assert!(idl_is_processable(&vec![counter_idl("counter", None)]));
}
