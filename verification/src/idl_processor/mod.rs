//! Turns the schemas of contracts into an OpenAPI document.

pub mod variant_info;
pub mod spec;

use vstd::prelude::*;
use crate::api_doc::{
    ApiDoc, PathEntryView, new_path_map, paths_view, HttpMethod, Operation, PathEntry, QueryParameter, ResponseSpec, SchemaType,
    insert_path, lemma_ordered_insert_view, ordered_insert_view, path_entries, query_params_view,
};
use crate::error::CliError;
use crate::idl_processor::spec::{
    alts_ok, plain_variant, spec_alt_type, spec_description, spec_param_type, spec_params,
    spec_required, spec_variant, spec_variants, spec_variants_of, is_int_width, params_resolvable,
    spec_path_entry, spec_path_name, spec_query_param, spec_resolvable, spec_resolve_type, with_paths,
    contract_valid, idls_processable, lemma_all_paths_valid, message_valid, spec_api_doc,
    spec_doc_after, spec_insert_variants, spec_message, variants_resolvable,
};
use crate::idl_loader::loaded_idl::LoadedIdl;
use crate::idl_processor::laws::law_message_parameters_ascending;
use crate::idl_processor::variant_info::keys_ascending;
use crate::wasm_codec::z85_encode;
use crate::idl_processor::variant_info::{
    ParameterView, VariantInfo, VariantParameter, VariantView, insert_parameter,
    mark_required_parameters, params_view, variants_view,
};
use crate::json::{Json, json_array, json_get, json_str};
use crate::text::{concat, prefix_before, str_equal, suffix_after, texts_of};

verus! {

/// `description` of a variant schema, `None` where it is no string.
fn try_description(v: &Json) -> (r: Option<String>)
    ensures
        r is Some <==> spec_description(*v) is Some,
        r matches Some(s) ==> spec_description(*v) == Some(s@),
{
    match v.get("description") {
        None => Some(String::new()),
        Some(d) => match d.as_str() {
            Some(s) => Some(s.to_owned()),
            None => None,
        },
    }
}

/// The type an `anyOf` alternative names.
fn try_alt_type(x: &Json) -> (r: Option<String>)
    ensures
        r is Some <==> spec_alt_type(*x) is Some,
        r matches Some(s) ==> spec_alt_type(*x) == Some(s@),
{
    match x.get("$ref") {
        Some(r) => match r.as_str() {
            Some(s) => Some(suffix_after(s, '/')),
            None => None,
        },
        None => match x.get("type") {
            Some(t) => match t.as_str() {
                Some(s) => Some(s.to_owned()),
                None => None,
            },
            None => None,
        },
    }
}

/// The type of a parameter schema.
fn try_param_type(v: &Json) -> (r: Option<String>)
    ensures
        r is Some <==> spec_param_type(*v) is Some,
        r matches Some(s) ==> spec_param_type(*v) == Some(s@),
{
    match v.get("type") {
        Some(t) => match t {
            Json::Str(s) => Some(s.clone()),
            Json::Array(a) => if a.len() > 0 {
                match a[0].as_str() {
                    Some(s) => Some(s.to_owned()),
                    None => None,
                }
            } else {
                None
            },
            _ => Some(String::new()),
        },
        None => match v.get("anyOf") {
            Some(any) => match any.as_array() {
                Some(alts) => {
                    let n = alts.len();
                    let mut i: usize = 0;
                    while i < n
                        invariant
                            n == alts@.len(),
                            i <= n,
                            json_get(*v, "type"@) is None,
                            json_get(*v, "anyOf"@) == Some(*any),
                            json_array(*any) == Some(alts@),
                            forall|j: int| 0 <= j < i ==> (#[trigger] spec_alt_type(alts@[j])) is Some,
                        decreases n - i,
                    {
                        match try_alt_type(&alts[i]) {
                            Some(_) => {},
                            None => {
                                assert(spec_alt_type(alts@[i as int]) is None);
                                assert(!alts_ok(alts@));
                                return None;
                            },
                        }
                        i = i + 1;
                    }
                    if n == 0 {
                        None
                    } else {
                        try_alt_type(&alts[0])
                    }
                },
                None => None,
            },
            None => match v.get("$ref") {
                Some(r) => match r.as_str() {
                    Some(s) => Some(suffix_after(s, '/')),
                    None => None,
                },
                None => None,
            },
        },
    }
}

/// The names a parameter schema lists as `required`.
fn try_required(pval: &Json) -> (r: Option<Vec<String>>)
    ensures
        r is Some <==> spec_required(*pval) is Some,
        r matches Some(v) ==> spec_required(*pval) == Some(texts_of(v@)),
{
    match pval.get("required") {
        Some(Json::Array(a)) => {
            let mut out: Vec<String> = Vec::new();
            let n = a.len();
            let mut i: usize = 0;
            while i < n
                invariant
                    n == a@.len(),
                    i <= n,
                    out@.len() == i,
                    json_get(*pval, "required"@) == Some(Json::Array(*a)),
                    forall|j: int| 0 <= j < i ==> (#[trigger] json_str(a@[j])) is Some,
                    forall|j: int| 0 <= j < i ==> json_str(a@[j]) == Some(#[trigger] out@[j]@),
                decreases n - i,
            {
                match a[i].as_str() {
                    Some(s) => {
                        out.push(s.to_owned());
                    },
                    None => {
                        assert(json_str(a@[i as int]) is None);
                        return None;
                    },
                }
                i = i + 1;
            }
            assert(texts_of(out@) =~= a@.map_values(|x: Json| json_str(x).unwrap()));
            Some(out)
        },
        _ => Some(Vec::new()),
    }
}

/// The parameters described by the members of a `properties` object, none
/// required yet, ascending by name.
fn try_params(entries: &Vec<(String, Json)>) -> (r: Option<Vec<(String, VariantParameter)>>)
    ensures
        r is Some <==> spec_params(entries@, entries@.len() as int) is Some,
        r matches Some(p) ==> spec_params(entries@, entries@.len() as int) == Some(params_view(p@)),
{
    let mut out: Vec<(String, VariantParameter)> = Vec::new();
    let n = entries.len();
    let mut i: usize = 0;
    assert(params_view(out@) =~= Seq::<(Seq<char>, ParameterView)>::empty());
    while i < n
        invariant
            n == entries@.len(),
            i <= n,
            spec_params(entries@, i as int) == Some(params_view(out@)),
        decreases n - i,
    {
        match try_param_type(&entries[i].1) {
            Some(t) => {
                insert_parameter(&mut out, entries[i].0.clone(), VariantParameter { t, required: false });
            },
            None => {
                proof {
                    let k = i as int + 1;
                    assert(spec_params(entries@, k) is None);
                    assert forall|m: int| k <= m <= n implies spec_params(entries@, m) is None by {
                        lemma_params_stay_none(entries@, k, m);
                    }
                }
                return None;
            },
        }
        i = i + 1;
    }
    Some(out)
}

/// The variants one variant schema yields (none or one), `None` where the
/// schema is malformed in a way that stops the processing.
fn try_extract_variant(variant: &Json, read_call: bool, single_variant: bool, contract_tag: &str) -> (r:
    Option<Vec<VariantInfo>>)
    ensures
        r is Some <==> spec_variant(*variant, read_call, single_variant, contract_tag@) is Some,
        r matches Some(v) ==> spec_variant(*variant, read_call, single_variant, contract_tag@)
            == Some(variants_view(v@)),
{
    let description = match try_description(variant) {
        Some(d) => d,
        None => {
            return None;
        },
    };
    let mut out: Vec<VariantInfo> = Vec::new();
    if let Some(enum_val) = variant.get("enum") {
        if let Some(enum_array) = enum_val.as_array() {
            if enum_array.len() > 0 {
                if let Some(name) = enum_array[0].as_str() {
                    out.push(
                        VariantInfo {
                            name: name.to_owned(),
                            description,
                            parameters: Vec::new(),
                            read_call,
                            contract_tag: contract_tag.to_owned(),
                        },
                    );
                    assert(params_view(out@[0].parameters@) =~= Seq::<(Seq<char>, ParameterView)>::empty());
                }
            }
        }
        assert(variants_view(out@) =~= spec_variant(*variant, read_call, single_variant, contract_tag@).unwrap());
        return Some(out);
    }
    let properties = match variant.get("properties") {
        None => {
            assert(variants_view(out@) =~= Seq::<VariantView>::empty());
            return Some(out);
        },
        Some(p) => p,
    };
    let entries = match properties.as_object() {
        None => {
            return None;
        },
        Some(e) => e,
    };
    if entries.len() == 0 {
        assert(variants_view(out@) =~= Seq::<VariantView>::empty());
        return Some(out);
    }
    let param_name = &entries[0].0;
    let param_value = &entries[0].1;
    let null = Json::Null;
    let inner: Option<&Vec<(String, Json)>> = if single_variant {
        Some(entries)
    } else {
        match param_value.get("properties") {
            Some(p) => p.as_object(),
            None => null.as_object(),
        }
    };
    match inner {
        None => {
            out.push(
                VariantInfo {
                    name: param_name.clone(),
                    description,
                    parameters: Vec::new(),
                    read_call,
                    contract_tag: contract_tag.to_owned(),
                },
            );
            assert(params_view(out@[0].parameters@) =~= Seq::<(Seq<char>, ParameterView)>::empty());
            assert(variants_view(out@) =~= seq![plain_variant(param_name@, description@, read_call, contract_tag@)]);
            Some(out)
        },
        Some(inner_entries) => {
            let required = match try_required(param_value) {
                Some(r) => r,
                None => {
                    return None;
                },
            };
            let mut parameters = match try_params(inner_entries) {
                Some(p) => p,
                None => {
                    return None;
                },
            };
            mark_required_parameters(&mut parameters, &required);
            let name = if single_variant {
                match variant.get("title") {
                    Some(t) => match t.as_str() {
                        Some(s) => s.to_owned(),
                        None => {
                            return None;
                        },
                    },
                    None => {
                        return None;
                    },
                }
            } else {
                param_name.clone()
            };
            out.push(
                VariantInfo {
                    name,
                    description,
                    parameters,
                    read_call,
                    contract_tag: contract_tag.to_owned(),
                },
            );
            assert(variants_view(out@) =~= spec_variant(*variant, read_call, single_variant, contract_tag@).unwrap());
            Some(out)
        },
    }
}

/// Adds to `variants` the variant that the schema `variant` describes, if it
/// describes one: a string `enum` names a variant without parameters; a
/// `properties` object describes one through its first member (the whole
/// object when `single_variant`), named by that member (by the schema's
/// `title` when `single_variant`), whose parameters are that member's
/// `properties` with the types they name, marked required when the member's
/// `required` lists them.
pub fn extract_variant(
    variants: &mut Vec<VariantInfo>,
    variant: &Json,
    read_call: bool,
    single_variant: bool,
    contract_tag: &str,
)
    requires
        spec_variant(*variant, read_call, single_variant, contract_tag@) is Some,
    ensures
        variants_view(final(variants)@) == variants_view(old(variants)@) + spec_variant(
            *variant,
            read_call,
            single_variant,
            contract_tag@,
        ).unwrap(),
{
    let mut found = try_extract_variant(variant, read_call, single_variant, contract_tag).unwrap();
    let ghost before = variants@;
    let ghost added = found@;
    variants.append(&mut found);
    assert(variants_view(variants@) =~= variants_view(before) + variants_view(added));
}

/// The variants of the alternatives of a `oneOf`, in order.
fn try_variants_of(arr: &Vec<Json>, read_call: bool, contract_tag: &str) -> (r: Option<Vec<VariantInfo>>)
    ensures
        r is Some <==> spec_variants_of(arr@, read_call, contract_tag@, arr@.len() as int) is Some,
        r matches Some(v) ==> spec_variants_of(arr@, read_call, contract_tag@, arr@.len() as int)
            == Some(variants_view(v@)),
{
    let mut out: Vec<VariantInfo> = Vec::new();
    let n = arr.len();
    let mut i: usize = 0;
    assert(variants_view(out@) =~= Seq::<VariantView>::empty());
    while i < n
        invariant
            n == arr@.len(),
            i <= n,
            spec_variants_of(arr@, read_call, contract_tag@, i as int) == Some(variants_view(out@)),
        decreases n - i,
    {
        match try_extract_variant(&arr[i], read_call, false, contract_tag) {
            Some(mut found) => {
                let ghost before = out@;
                let ghost added = found@;
                out.append(&mut found);
                assert(variants_view(out@) =~= variants_view(before) + variants_view(added));
            },
            None => {
                proof {
                    let k = i as int + 1;
                    assert(spec_variants_of(arr@, read_call, contract_tag@, k) is None);
                    assert forall|m: int| k <= m <= n implies spec_variants_of(
                        arr@,
                        read_call,
                        contract_tag@,
                        m,
                    ) is None by {
                        lemma_variants_of_stay_none(arr@, read_call, contract_tag@, k, m);
                    }
                }
                return None;
            },
        }
        i = i + 1;
    }
    Some(out)
}

proof fn lemma_variants_of_stay_none(arr: Seq<Json>, read_call: bool, tag: Seq<char>, k: int, m: int)
    requires
        k <= m,
        spec_variants_of(arr, read_call, tag, k) is None,
    ensures
        spec_variants_of(arr, read_call, tag, m) is None,
    decreases m - k,
{
    if k < m {
        lemma_variants_of_stay_none(arr, read_call, tag, k, m - 1);
    }
}

/// The variants of a message schema.
fn try_extract_variants(contract_tag: &str, schema_part: &Json) -> (r: Option<Vec<VariantInfo>>)
    ensures
        r is Some <==> spec_variants(contract_tag@, *schema_part) is Some,
        r matches Some(v) ==> spec_variants(contract_tag@, *schema_part) == Some(variants_view(v@)),
{
    let title = match schema_part.get("title") {
        Some(t) => match t.as_str() {
            Some(s) => s,
            None => {
                return None;
            },
        },
        None => {
            return None;
        },
    };
    let read_call = str_equal(title, "QueryMsg");
    match schema_part.get("oneOf") {
        Some(one_of) => match one_of.as_array() {
            Some(arr) => try_variants_of(arr, read_call, contract_tag),
            None => {
                let out: Vec<VariantInfo> = Vec::new();
                assert(variants_view(out@) =~= Seq::<VariantView>::empty());
                Some(out)
            },
        },
        None => try_extract_variant(schema_part, read_call, true, contract_tag),
    }
}

/// The variants of a message schema: one per `oneOf` alternative that
/// describes one, in order, or the one the schema itself describes when it
/// has no `oneOf`. They are queries when the schema is titled `QueryMsg`.
pub fn extract_variants(contract_tag: &str, schema_part: &Json) -> (r: Result<Vec<VariantInfo>, CliError>)
    requires
        spec_variants(contract_tag@, *schema_part) is Some,
    ensures
        r matches Ok(v) && spec_variants(contract_tag@, *schema_part) == Some(variants_view(v@)),
{
    Ok(try_extract_variants(contract_tag, schema_part).unwrap())
}

/// Whether a type name can be split after its first byte.
fn is_resolvable(t: &str) -> (r: bool)
    ensures
        r == spec_resolvable(t@),
{
    let n = t.unicode_len();
    n > 0 && (t.get_char(0) as u32) < 128
}

/// Whether the chars of `t` from position 1 on are an integer width.
fn has_int_width(t: &str) -> (r: bool)
    requires
        t@.len() >= 1,
    ensures
        r == is_int_width(t@.skip(1)),
{
    let n = t.unicode_len();
    let ghost w = t@.skip(1);
    if n == 2 {
        let r = t.get_char(1) == '8';
        assert(w.len() == 1 && w[0] == t@[1]);
        assert(r ==> w =~= seq!['8']);
        assert(w == seq!['8'] ==> r) by {
            if w == seq!['8'] {
                assert(w[0] == seq!['8'][0]);
            }
        }
        assert(seq!['1', '6'].len() == 2);
        assert(seq!['3', '2'].len() == 2);
        assert(seq!['6', '4'].len() == 2);
        r
    } else if n == 3 {
        let a = t.get_char(1);
        let b = t.get_char(2);
        let r = (a == '1' && b == '6') || (a == '3' && b == '2') || (a == '6' && b == '4');
        assert(w.len() == 2 && w[0] == a && w[1] == b);
        assert(a == '1' && b == '6' ==> w =~= seq!['1', '6']);
        assert(a == '3' && b == '2' ==> w =~= seq!['3', '2']);
        assert(a == '6' && b == '4' ==> w =~= seq!['6', '4']);
        assert(w == seq!['1', '6'] ==> a == '1' && b == '6') by {
            if w == seq!['1', '6'] {
                assert(w[0] == seq!['1', '6'][0]);
                assert(w[1] == seq!['1', '6'][1]);
            }
        }
        assert(w == seq!['3', '2'] ==> a == '3' && b == '2') by {
            if w == seq!['3', '2'] {
                assert(w[0] == seq!['3', '2'][0]);
                assert(w[1] == seq!['3', '2'][1]);
            }
        }
        assert(w == seq!['6', '4'] ==> a == '6' && b == '4') by {
            if w == seq!['6', '4'] {
                assert(w[0] == seq!['6', '4'][0]);
                assert(w[1] == seq!['6', '4'][1]);
            }
        }
        r
    } else {
        assert(w.len() != 1 && w.len() != 2);
        assert(seq!['8'].len() == 1);
        assert(seq!['1', '6'].len() == 2);
        assert(seq!['3', '2'].len() == 2);
        assert(seq!['6', '4'].len() == 2);
        false
    }
}

/// The schema of a parameter type: `i8`, `i16`, `i32`, `i64` are numbers,
/// `u8`, `u16`, `u32`, `u64` numbers bounded below by zero, anything else a
/// string.
pub fn resolve_type(t: &str) -> (r: SchemaType)
    requires
        spec_resolvable(t@),
    ensures
        r == spec_resolve_type(t@),
{
    let l = t.get_char(0);
    if (l == 'i' || l == 'u') && has_int_width(t) {
        SchemaType::Number { unsigned: l == 'u' }
    } else {
        SchemaType::Text
    }
}

/// The query parameter documenting a variant's parameter.
pub fn resolve_parameter_data(name: &str, parameter: &VariantParameter) -> (r: QueryParameter)
    requires
        spec_resolvable(parameter.t@),
    ensures
        r.name@ == name@,
        r.required == parameter.required,
        r.schema == spec_resolve_type(parameter.t@),
        r@ == spec_query_param((name@, parameter@)),
{
    QueryParameter {
        name: name.to_owned(),
        required: parameter.required,
        schema: resolve_type(parameter.t.as_str()),
    }
}

/// Adds the path item of a variant to the document, under
/// `/<contract>/<variant>`, replacing an item already there.
pub fn generate_path_item(variant: &VariantInfo, api: &mut ApiDoc)
    requires
        params_resolvable(variant@),
        keys_ascending(variant@.parameters),
    ensures
        final(api)@ == with_paths(
            old(api)@,
            ordered_insert_view(old(api)@.paths, spec_path_name(variant@), spec_path_entry(variant@)),
        ),
{
    let path_name = concat(
        concat(concat("/", variant.contract_tag.as_str()).as_str(), "/").as_str(),
        variant.name.as_str(),
    );
    let mut params: Vec<QueryParameter> = Vec::new();
    let n = variant.parameters.len();
    let mut i: usize = 0;
    while i < n
        invariant
            n == variant.parameters@.len(),
            i <= n,
            params_resolvable(variant@),
            params@.len() == i,
            forall|j: int| 0 <= j < i ==> #[trigger] query_params_view(params@)[j] == variant@.parameters.map_values(
                |e: (Seq<char>, ParameterView)| spec_query_param(e),
            )[j],
        decreases n - i,
    {
        assert(spec_resolvable(variant@.parameters[i as int].1.t));
        let ghost before = params@;
        params.push(resolve_parameter_data(variant.parameters[i].0.as_str(), &variant.parameters[i].1));
        proof {
            assert forall|j: int| 0 <= j < i implies #[trigger] query_params_view(params@)[j]
                == variant@.parameters.map_values(
                |e: (Seq<char>, ParameterView)| spec_query_param(e),
            )[j] by {
                assert(params@[j] == before[j]);
                assert(query_params_view(before)[j] == variant@.parameters.map_values(
                    |e: (Seq<char>, ParameterView)| spec_query_param(e),
                )[j]);
            }
        }
        i = i + 1;
    }
    assert(query_params_view(params@) =~= variant@.parameters.map_values(
        |e: (Seq<char>, ParameterView)| spec_query_param(e),
    ));
    let response = ResponseSpec {
        status: 200,
        description: "A successful response".to_owned(),
        content_type: "application/json".to_owned(),
        schema_title: "Response from the chain".to_owned(),
    };
    let tags = vec![variant.contract_tag.clone()];
    assert(texts_of(tags@) =~= seq![variant.contract_tag@]);
    let operation = Operation {
        summary: prefix_before(variant.description.as_str(), '\n'),
        description: variant.description.clone(),
        tags,
        parameters: params,
        response,
    };
    let entry = PathEntry {
        method: if variant.read_call {
            HttpMethod::Get
        } else {
            HttpMethod::Post
        },
        operation,
        variant: variant.copy(),
    };
    proof {
        reveal_strlit("/");
    }
    assert(path_name@ == spec_path_name(variant@));
    assert(entry@ == spec_path_entry(variant@));
    proof {
        lemma_ordered_insert_view(path_entries(api.paths), path_name, entry);
    }
    insert_path(&mut api.paths, path_name, entry);
}

/// Adds the path items of all variants of a message schema, in order.
fn process_message(contract_tag: &str, schema: &Json, api: &mut ApiDoc)
    requires
        spec_message(Some(old(api)@.paths), contract_tag@, *schema) is Some,
    ensures
        final(api)@ == with_paths(
            old(api)@,
            spec_message(Some(old(api)@.paths), contract_tag@, *schema).unwrap(),
        ),
{
    let ghost start = api@;
    let variants = extract_variants(contract_tag, schema).unwrap();
    let ghost vs = variants_view(variants@);
    proof {
        law_message_parameters_ascending(contract_tag@, *schema);
    }
    let n = variants.len();
    let mut i: usize = 0;
    while i < n
        invariant
            n == variants@.len(),
            i <= n,
            vs == variants_view(variants@),
            variants_resolvable(vs),
            forall|k: int| 0 <= k < vs.len() ==> keys_ascending((#[trigger] vs[k]).parameters),
            api@ == with_paths(start, spec_insert_variants(start.paths, vs, i as int)),
        decreases n - i,
    {
        assert(params_resolvable(vs[i as int]));
        assert(keys_ascending(vs[i as int].parameters));
        assert(variants@[i as int]@ == vs[i as int]);
        generate_path_item(&variants[i], api);
        i = i + 1;
    }
}

/// The OpenAPI document of the contracts: for each contract in order, its
/// wasm binary (if any) becomes the `x-wasm` extension in Z85 text, and the
/// variants of its `execute`, `query` and `instantiate` messages become
/// path items under `/<contract_name>/<variant>`.
pub fn process_idl(idl: &Vec<LoadedIdl>) -> (r: Result<ApiDoc, CliError>)
    requires
        idls_processable(idl@),
    ensures
        r matches Ok(d) && d@ == spec_api_doc(idl@),
{
    let mut openapi = ApiDoc {
        openapi: "3.0.0".to_owned(),
        title: "CosmWasm Swaggy Documentation".to_owned(),
        description: Some("CosmWasm workspace documentation".to_owned()),
        version: "0.1.0".to_owned(),
        x_wasm: None,
        paths: new_path_map(),
        components: true,
    };
    let n = idl.len();
    proof {
        lemma_all_paths_valid(idl@, n as int);
    }
    assert(paths_view(path_entries(openapi.paths)) =~= Seq::<(Seq<char>, PathEntryView)>::empty());
    let mut i: usize = 0;
    while i < n
        invariant
            n == idl@.len(),
            i <= n,
            forall|k: int| 0 <= k < n ==> contract_valid(#[trigger] idl@[k]),
            openapi@ == spec_doc_after(idl@, i as int),
        decreases n - i,
    {
        let contract_idl = &idl[i];
        if let Some(wasm_bytes) = &contract_idl.wasm {
            let encoded = z85_encode(wasm_bytes.as_slice());
            openapi.x_wasm = Some(encoded);
        }
        let idl_json = &contract_idl.idl;
        assert(contract_valid(idl@[i as int]));
        proof {
            lemma_all_paths_valid(idl@, i as int);
            lemma_all_paths_valid(idl@, i as int + 1);
        }
        let contract_tag = idl_json.get("contract_name").unwrap().as_str().unwrap();
        let null = Json::Null;
        let execute = match idl_json.get("execute") {
            Some(x) => x,
            None => &null,
        };
        let query = match idl_json.get("query") {
            Some(x) => x,
            None => &null,
        };
        let instantiate = match idl_json.get("instantiate") {
            Some(x) => x,
            None => &null,
        };
        process_message(contract_tag, execute, &mut openapi);
        process_message(contract_tag, query, &mut openapi);
        process_message(contract_tag, instantiate, &mut openapi);
        i = i + 1;
    }
    Ok(openapi)
}

/// Whether every parameter of every variant has a resolvable type.
fn variants_all_resolvable(variants: &Vec<VariantInfo>) -> (r: bool)
    ensures
        r == variants_resolvable(variants_view(variants@)),
{
    let n = variants.len();
    let mut i: usize = 0;
    while i < n
        invariant
            n == variants@.len(),
            i <= n,
            forall|j: int| 0 <= j < i ==> params_resolvable(#[trigger] variants_view(variants@)[j]),
        decreases n - i,
    {
        let params = &variants[i].parameters;
        let m = params.len();
        let mut k: usize = 0;
        while k < m
            invariant
                n == variants@.len(),
                i < n,
                m == params@.len(),
                k <= m,
                *params == variants@[i as int].parameters,
                forall|j: int| 0 <= j < k ==> spec_resolvable(#[trigger] params@[j].1.t@),
            decreases m - k,
        {
            if !is_resolvable(params[k].1.t.as_str()) {
                assert(variants_view(variants@)[i as int].parameters[k as int].1.t == params@[k as int].1.t@);
                assert(!params_resolvable(variants_view(variants@)[i as int]));
                return false;
            }
            k = k + 1;
        }
        assert(params_resolvable(variants_view(variants@)[i as int])) by {
            assert forall|j: int| 0 <= j < variants_view(variants@)[i as int].parameters.len() implies spec_resolvable(
                #[trigger] variants_view(variants@)[i as int].parameters[j].1.t,
            ) by {
                assert(spec_resolvable(params@[j].1.t@));
            }
        }
        i = i + 1;
    }
    true
}

/// Whether a message schema can be processed.
fn message_is_valid(contract_tag: &str, schema: &Json) -> (r: bool)
    ensures
        r == message_valid(contract_tag@, *schema),
{
    match try_extract_variants(contract_tag, schema) {
        Some(variants) => variants_all_resolvable(&variants),
        None => false,
    }
}

/// Whether `process_idl` can process these contracts: each has a string
/// `contract_name`, and each of its `execute`, `query` and `instantiate`
/// schemas is well enough formed (titled, with string descriptions, typed
/// parameters whose type names start with an ASCII char, and so on). Where
/// this is false the processing would stop with a panic.
pub fn idl_is_processable(idl: &Vec<LoadedIdl>) -> (r: bool)
    ensures
        r == idls_processable(idl@),
{
    let n = idl.len();
    proof {
        lemma_all_paths_valid(idl@, n as int);
    }
    let mut i: usize = 0;
    while i < n
        invariant
            n == idl@.len(),
            i <= n,
            idls_processable(idl@) <==> forall|k: int| 0 <= k < n ==> contract_valid(#[trigger] idl@[k]),
            forall|k: int| 0 <= k < i ==> contract_valid(#[trigger] idl@[k]),
        decreases n - i,
    {
        let idl_json = &idl[i].idl;
        let tag = match idl_json.get("contract_name") {
            Some(t) => match t.as_str() {
                Some(s) => s,
                None => {
                    assert(!contract_valid(idl@[i as int]));
                    return false;
                },
            },
            None => {
                assert(!contract_valid(idl@[i as int]));
                return false;
            },
        };
        let null = Json::Null;
        let execute = match idl_json.get("execute") {
            Some(x) => x,
            None => &null,
        };
        let query = match idl_json.get("query") {
            Some(x) => x,
            None => &null,
        };
        let instantiate = match idl_json.get("instantiate") {
            Some(x) => x,
            None => &null,
        };
        if !(message_is_valid(tag, execute) && message_is_valid(tag, query) && message_is_valid(
            tag,
            instantiate,
        )) {
            assert(!contract_valid(idl@[i as int]));
            return false;
        }
        assert(contract_valid(idl@[i as int]));
        i = i + 1;
    }
    true
}

proof fn lemma_params_stay_none(entries: Seq<(String, Json)>, k: int, m: int)
    requires
        k <= m,
        spec_params(entries, k) is None,
    ensures
        spec_params(entries, m) is None,
    decreases m - k,
{
    if k < m {
        lemma_params_stay_none(entries, k, m - 1);
    }
}

} // verus!
pub mod laws;
pub mod variant_laws;
