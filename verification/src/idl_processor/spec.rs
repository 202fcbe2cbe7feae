//! What the schema logic computes, stated over the JSON values it reads.
//! Each function returns `None` exactly on the inputs on which the logic
//! stops with a panic (an `unwrap` of a missing or mistyped value).

use vstd::prelude::*;
use crate::api_doc::{
    ApiDocView, HttpMethod, OperationView, PathEntryView, QueryParameterView, ResponseView,
    SchemaType, ordered_insert_view,
};
use crate::idl_loader::loaded_idl::LoadedIdl;
use crate::idl_processor::variant_info::{ParameterView, VariantView, mark_required, sorted_insert};
use crate::json::{Json, json_array, json_get, json_index, json_object, json_str};
use crate::text::{after_last, before_first, code};
use crate::wasm_codec::z85_encoding;

verus! {

/// The description of a variant: its `description` string, empty when absent.
pub open spec fn spec_description(v: Json) -> Option<Seq<char>> {
    match json_get(v, "description"@) {
        None => Some(Seq::empty()),
        Some(d) => json_str(d),
    }
}

/// The type named by one alternative of an `anyOf`: the last segment of its
/// `$ref`, else its `type`.
pub open spec fn spec_alt_type(x: Json) -> Option<Seq<char>> {
    match json_get(x, "$ref"@) {
        Some(r) => match json_str(r) {
            Some(s) => Some(after_last(s, '/')),
            None => None,
        },
        None => match json_get(x, "type"@) {
            Some(t) => json_str(t),
            None => None,
        },
    }
}

/// Every alternative names a type.
pub open spec fn alts_ok(alts: Seq<Json>) -> bool {
    forall|i: int| 0 <= i < alts.len() ==> (#[trigger] spec_alt_type(alts[i])) is Some
}

/// The type of a parameter schema: its `type` (a string, or the first of an
/// array, or empty for anything else); else the first `anyOf` alternative;
/// else the last segment of its `$ref`.
pub open spec fn spec_param_type(v: Json) -> Option<Seq<char>> {
    match json_get(v, "type"@) {
        Some(t) => match t {
            Json::Str(s) => Some(s@),
            Json::Array(a) => if a@.len() > 0 {
                json_str(a@[0])
            } else {
                None
            },
            _ => Some(Seq::empty()),
        },
        None => match json_get(v, "anyOf"@) {
            Some(any) => match json_array(any) {
                Some(alts) => if alts.len() > 0 && alts_ok(alts) {
                    spec_alt_type(alts[0])
                } else {
                    None
                },
                None => None,
            },
            None => match json_get(v, "$ref"@) {
                Some(r) => match json_str(r) {
                    Some(s) => Some(after_last(s, '/')),
                    None => None,
                },
                None => None,
            },
        },
    }
}

/// The names listed under `required` (none when it is no array).
pub open spec fn spec_required(pval: Json) -> Option<Seq<Seq<char>>> {
    match json_index(pval, "required"@) {
        Json::Array(a) => if forall|i: int| 0 <= i < a@.len() ==> (#[trigger] json_str(a@[i])) is Some {
            Some(a@.map_values(|x: Json| json_str(x).unwrap()))
        } else {
            None
        },
        _ => Some(Seq::empty()),
    }
}

/// The parameters described by the first `n` members of a `properties`
/// object, none of them required yet, ascending by name.
pub open spec fn spec_params(entries: Seq<(String, Json)>, n: int) -> Option<
    Seq<(Seq<char>, ParameterView)>,
>
    decreases n,
{
    if n <= 0 {
        Some(Seq::empty())
    } else {
        match spec_params(entries, n - 1) {
            Some(p) => match spec_param_type(entries[n - 1].1) {
                Some(t) => Some(
                    sorted_insert(p, entries[n - 1].0@, ParameterView { t: t, required: false }),
                ),
                None => None,
            },
            None => None,
        }
    }
}

/// A variant without parameters.
pub open spec fn plain_variant(
    name: Seq<char>,
    description: Seq<char>,
    read_call: bool,
    tag: Seq<char>,
) -> VariantView {
    VariantView {
        name: name,
        description: description,
        parameters: Seq::empty(),
        read_call: read_call,
        contract_tag: tag,
    }
}

/// The variants that one schema of a message variant yields (none or one).
/// `single` says that the schema is the whole message rather than one of
/// its `oneOf` alternatives.
pub open spec fn spec_variant(v: Json, read_call: bool, single: bool, tag: Seq<char>) -> Option<
    Seq<VariantView>,
> {
    match spec_description(v) {
        None => None,
        Some(desc) => match json_get(v, "enum"@) {
            Some(e) => match json_array(e) {
                Some(a) => if a.len() > 0 {
                    match json_str(a[0]) {
                        Some(name) => Some(seq![plain_variant(name, desc, read_call, tag)]),
                        None => Some(Seq::empty()),
                    }
                } else {
                    Some(Seq::empty())
                },
                None => Some(Seq::empty()),
            },
            None => match json_get(v, "properties"@) {
                None => Some(Seq::empty()),
                Some(props) => match json_object(props) {
                    None => None,
                    Some(entries) => if entries.len() == 0 {
                        Some(Seq::empty())
                    } else {
                        let pname = entries[0].0@;
                        let pval = entries[0].1;
                        let inner = if single {
                            Some(entries)
                        } else {
                            json_object(json_index(pval, "properties"@))
                        };
                        match inner {
                            None => Some(seq![plain_variant(pname, desc, read_call, tag)]),
                            Some(ie) => {
                                let name = if single {
                                    match json_get(v, "title"@) {
                                        Some(t) => json_str(t),
                                        None => None,
                                    }
                                } else {
                                    Some(pname)
                                };
                                match (spec_required(pval), spec_params(ie, ie.len() as int), name) {
                                    (Some(req), Some(params), Some(n)) => Some(
                                        seq![
                                            VariantView {
                                                name: n,
                                                description: desc,
                                                parameters: mark_required(params, req),
                                                read_call: read_call,
                                                contract_tag: tag,
                                            },
                                        ],
                                    ),
                                    _ => None,
                                }
                            },
                        }
                    },
                },
            },
        },
    }
}

/// The variants of the first `n` alternatives of a `oneOf`, in order.
pub open spec fn spec_variants_of(arr: Seq<Json>, read_call: bool, tag: Seq<char>, n: int) -> Option<
    Seq<VariantView>,
>
    decreases n,
{
    if n <= 0 {
        Some(Seq::empty())
    } else {
        match spec_variants_of(arr, read_call, tag, n - 1) {
            Some(vs) => match spec_variant(arr[n - 1], read_call, false, tag) {
                Some(v) => Some(vs + v),
                None => None,
            },
            None => None,
        }
    }
}

/// The variants of a message schema: those of its `oneOf` alternatives, or
/// the schema itself when it has none. Queries are the messages titled
/// `QueryMsg`.
pub open spec fn spec_variants(tag: Seq<char>, schema: Json) -> Option<Seq<VariantView>> {
    match json_get(schema, "title"@) {
        Some(t) => match json_str(t) {
            Some(title) => {
                let read_call = title == "QueryMsg"@;
                match json_get(schema, "oneOf"@) {
                    Some(one_of) => match json_array(one_of) {
                        Some(arr) => spec_variants_of(arr, read_call, tag, arr.len() as int),
                        None => Some(Seq::empty()),
                    },
                    None => spec_variant(schema, read_call, true, tag),
                }
            },
            None => None,
        },
        None => None,
    }
}

/// A type name can be split after its first byte.
pub open spec fn spec_resolvable(t: Seq<char>) -> bool {
    t.len() > 0 && code(t[0]) < 128
}

/// The widths of the integer types named `i..`/`u..`.
pub open spec fn is_int_width(n: Seq<char>) -> bool {
    n == seq!['8'] || n == seq!['1', '6'] || n == seq!['3', '2'] || n == seq!['6', '4']
}

/// The schema of a parameter type: integer types (`i8` .. `u64`) are numbers,
/// unsigned ones bounded below by zero; every other type is a string.
pub open spec fn spec_resolve_type(t: Seq<char>) -> SchemaType {
    if t.len() > 0 && (t[0] == 'i' || t[0] == 'u') && is_int_width(t.skip(1)) {
        SchemaType::Number { unsigned: t[0] == 'u' }
    } else {
        SchemaType::Text
    }
}

/// The query parameter documenting one parameter.
pub open spec fn spec_query_param(e: (Seq<char>, ParameterView)) -> QueryParameterView {
    QueryParameterView { name: e.0, required: e.1.required, schema: spec_resolve_type(e.1.t) }
}

/// Every parameter of a variant has a type that can be resolved.
pub open spec fn params_resolvable(v: VariantView) -> bool {
    forall|i: int| 0 <= i < v.parameters.len() ==> spec_resolvable(#[trigger] v.parameters[i].1.t)
}

/// Every parameter of every variant has a type that can be resolved.
pub open spec fn variants_resolvable(vs: Seq<VariantView>) -> bool {
    forall|i: int| 0 <= i < vs.len() ==> params_resolvable(#[trigger] vs[i])
}

/// The path of a variant: `/<contract>/<variant>`.
pub open spec fn spec_path_name(v: VariantView) -> Seq<char> {
    seq!['/'] + v.contract_tag + seq!['/'] + v.name
}

/// The response every operation documents.
pub open spec fn spec_response() -> ResponseView {
    ResponseView {
        status: 200,
        description: "A successful response"@,
        content_type: "application/json"@,
        schema_title: "Response from the chain"@,
    }
}

/// The path item of a variant: a GET for a query, a POST otherwise; the
/// summary is the first line of the description; the variant's parameters,
/// in their order, are its query parameters.
pub open spec fn spec_path_entry(v: VariantView) -> PathEntryView {
    PathEntryView {
        method: if v.read_call {
            HttpMethod::Get
        } else {
            HttpMethod::Post
        },
        operation: OperationView {
            summary: before_first(v.description, '\n'),
            description: v.description,
            tags: seq![v.contract_tag],
            parameters: v.parameters.map_values(
                |e: (Seq<char>, ParameterView)| spec_query_param(e),
            ),
            response: spec_response(),
        },
        variant: v,
    }
}

/// Adding the path items of the first `n` variants, in order.
pub open spec fn spec_insert_variants(
    paths: Seq<(Seq<char>, PathEntryView)>,
    vs: Seq<VariantView>,
    n: int,
) -> Seq<(Seq<char>, PathEntryView)>
    decreases n,
{
    if n <= 0 {
        paths
    } else {
        ordered_insert_view(
            spec_insert_variants(paths, vs, n - 1),
            spec_path_name(vs[n - 1]),
            spec_path_entry(vs[n - 1]),
        )
    }
}

/// Processing one message schema of a contract.
pub open spec fn spec_message(
    paths: Option<Seq<(Seq<char>, PathEntryView)>>,
    tag: Seq<char>,
    schema: Json,
) -> Option<Seq<(Seq<char>, PathEntryView)>> {
    match paths {
        None => None,
        Some(p) => match spec_variants(tag, schema) {
            Some(vs) => if variants_resolvable(vs) {
                Some(spec_insert_variants(p, vs, vs.len() as int))
            } else {
                None
            },
            None => None,
        },
    }
}

/// Processing one contract: its `execute`, `query` and `instantiate`
/// messages, in that order, tagged with its `contract_name`.
pub open spec fn spec_contract(paths: Option<Seq<(Seq<char>, PathEntryView)>>, c: LoadedIdl) -> Option<
    Seq<(Seq<char>, PathEntryView)>,
> {
    match json_str(json_index(c.idl, "contract_name"@)) {
        Some(tag) => spec_message(
            spec_message(
                spec_message(paths, tag, json_index(c.idl, "execute"@)),
                tag,
                json_index(c.idl, "query"@),
            ),
            tag,
            json_index(c.idl, "instantiate"@),
        ),
        None => None,
    }
}

/// The path items of the first `n` contracts.
pub open spec fn spec_all_paths(idls: Seq<LoadedIdl>, n: int) -> Option<
    Seq<(Seq<char>, PathEntryView)>,
>
    decreases n,
{
    if n <= 0 {
        Some(Seq::empty())
    } else {
        spec_contract(spec_all_paths(idls, n - 1), idls[n - 1])
    }
}

/// The `x-wasm` extension after the first `n` contracts: the Z85 text of
/// the last wasm binary among them.
pub open spec fn spec_x_wasm(idls: Seq<LoadedIdl>, n: int) -> Option<Seq<char>>
    decreases n,
{
    if n <= 0 {
        None
    } else {
        match idls[n - 1].wasm {
            Some(b) => Some(z85_encoding(b@)),
            None => spec_x_wasm(idls, n - 1),
        }
    }
}

/// The contracts can be processed without a panic.
pub open spec fn idls_processable(idls: Seq<LoadedIdl>) -> bool {
    spec_all_paths(idls, idls.len() as int) is Some
}

/// The document made of the first `n` contracts.
pub open spec fn spec_doc_after(idls: Seq<LoadedIdl>, n: int) -> ApiDocView {
    ApiDocView {
        openapi: "3.0.0"@,
        title: "CosmWasm Swaggy Documentation"@,
        description: Some("CosmWasm workspace documentation"@),
        version: "0.1.0"@,
        x_wasm: spec_x_wasm(idls, n),
        paths: spec_all_paths(idls, n).unwrap(),
        components: true,
    }
}

/// The document made of the contracts.
pub open spec fn spec_api_doc(idls: Seq<LoadedIdl>) -> ApiDocView {
    spec_doc_after(idls, idls.len() as int)
}

/// A document with its path items replaced.
pub open spec fn with_paths(d: ApiDocView, paths: Seq<(Seq<char>, PathEntryView)>) -> ApiDocView {
    ApiDocView { paths: paths, ..d }
}

/// A message schema can be processed without a panic.
pub open spec fn message_valid(tag: Seq<char>, schema: Json) -> bool {
    match spec_variants(tag, schema) {
        Some(vs) => variants_resolvable(vs),
        None => false,
    }
}

/// A contract can be processed without a panic.
pub open spec fn contract_valid(c: LoadedIdl) -> bool {
    match json_str(json_index(c.idl, "contract_name"@)) {
        Some(tag) => message_valid(tag, json_index(c.idl, "execute"@)) && message_valid(
            tag,
            json_index(c.idl, "query"@),
        ) && message_valid(tag, json_index(c.idl, "instantiate"@)),
        None => false,
    }
}

/// Whether a contract can be processed does not depend on the contracts
/// before it.
pub proof fn lemma_contract_valid(paths: Option<Seq<(Seq<char>, PathEntryView)>>, c: LoadedIdl)
    ensures
        spec_contract(paths, c) is Some <==> (paths is Some && contract_valid(c)),
{
}

/// The contracts can be processed exactly when each of them can.
pub proof fn lemma_all_paths_valid(idls: Seq<LoadedIdl>, n: int)
    requires
        0 <= n <= idls.len(),
    ensures
        spec_all_paths(idls, n) is Some <==> forall|i: int|
            0 <= i < n ==> contract_valid(#[trigger] idls[i]),
    decreases n,
{
    if n > 0 {
        lemma_all_paths_valid(idls, n - 1);
        lemma_contract_valid(spec_all_paths(idls, n - 1), idls[n - 1]);
        if spec_all_paths(idls, n) is Some {
            assert forall|i: int| 0 <= i < n implies contract_valid(#[trigger] idls[i]) by {
                if i < n - 1 {
                    assert(spec_all_paths(idls, n - 1) is Some);
                }
            }
        }
    }
}

} // verus!
